use symbolication::{
    line_frames, read_name, CompleteObjectInfo, DemangleFormat, FrameTrust, HexValue, Language,
    LineRecord, ObjectType, RawObjectInfo,
};

const CPP: u32 = 2;
const OBJCPP: u32 = 6;
const SWIFT: u32 = 8;

fn check_name(symbol: &str, language: u32) -> bool {
    symbolication::check_name(symbol, language, DemangleFormat::Short)
}

/// The function of a line with a symbol, where the symbol can be demangled.
fn function(symbol: &str, language: u32) -> Option<String> {
    let function = function_of(symbol, language);
    if check_name(symbol, language) {
        return Some(function);
    }
    assert_eq!(function, symbol);
    None
}

/// The function of a line with a symbol.
fn function_of(symbol: &str, language: u32) -> String {
    let info: CompleteObjectInfo = RawObjectInfo {
        ty: ObjectType("pe".to_owned()),
        code_id: None,
        code_file: None,
        debug_id: None,
        debug_file: None,
        image_addr: HexValue(0),
        image_size: None,
    }
    .into();
    let line = LineRecord {
        compilation_dir: String::new(),
        path: String::new(),
        filename: String::new(),
        language,
        symbol: symbol.to_owned(),
        line: 1,
        function_address: 0,
        instruction_address: 0,
    };
    let frames = line_frames(&info, 0, FrameTrust::Context, Some(vec![line])).unwrap();
    frames.into_iter().next().unwrap().function.unwrap()
}

fn many(part: &str, count: usize) -> String {
    part.repeat(count)
}

#[test]
fn languages_are_numbered() {
    assert_eq!(Language::Cpp.code(), CPP);
    assert_eq!(Language::ObjCpp.code(), OBJCPP);
    assert_eq!(Language::Swift.code(), SWIFT);
}

#[test]
fn names_of_each_demangler_are_demangled() {
    assert_eq!(function("?bar@foo@@YAXH@Z", CPP).as_deref(), Some("foo::bar(int)"));
    assert_eq!(function("?bar@foo@@YAXH@Z", 0).as_deref(), Some("foo::bar(int)"));
    assert_eq!(function("_ZN3foo3barEi", CPP).as_deref(), Some("foo::bar(int)"));
    assert_eq!(function("main", CPP).as_deref(), Some("main"));
    assert_eq!(function("", 0).as_deref(), Some(""));
    let swift = function("$s8mangling12GenericUnionO3FooyACyxGSicAEmlF", SWIFT).unwrap();
    assert!(swift.contains("GenericUnion"));
    let old = function("_TFC3foo3bar3basfT3zimCS_3zim_T_", SWIFT).unwrap();
    assert!(old.contains("bas"));
}

#[test]
fn long_names_are_demangled() {
    let text = "V?$basic_string@DU?$char_traits@D@std@@V?$allocator@D@2@@std@@";
    let values = format!("V?$_Vector_val@U?$_Simple_types@{}@std@@@std@@", text);
    let name = format!(
        "?erase@?$vector@{0}V?$allocator@{0}@2@@std@@QEAA?AV?$_Vector_iterator@{1}@2@V\
         ?$_Vector_const_iterator@{1}@2@0@Z",
        text, values
    );
    let function = function(&name, CPP).unwrap();
    assert!(function.contains("::erase("), "{}", function);
}

#[test]
fn names_are_left_to_the_demangler_of_their_language() {
    let deep = many("?", 1000);
    assert!(!check_name(&deep, CPP));
    assert!(!check_name(&deep, 0));
    assert!(!check_name(&deep, 99));
    for language in 3..9 {
        assert_eq!(function(&deep, language), Some(deep.clone()));
    }
    assert_eq!(function("$sTr", CPP).as_deref(), Some("$sTr"));
    assert_eq!(function("_Tr", CPP).as_deref(), Some("_Tr"));
}

#[test]
fn deep_msvc_names_are_refused() {
    // The start, a part that nests, how often it may stand there, and the end.
    let forms: [(&str, &str, usize, &str); 19] = [
        ("?x@@3", "PA", 108, "HA"),
        ("?x@@3", "PC", 108, "HA"),
        ("?x@@3", "PEA", 108, "HA"),
        ("?x@@3", "AC", 108, "HA"),
        ("?x@@3", "AEC", 108, "HA"),
        ("?x@@3", "QEC", 108, "HA"),
        ("?x@@3", "P6AX", 29, "XZHA"),
        ("?x@@3", "P8@@AEX", 29, "XZHA"),
        ("?", "?$a@V", 74, "x@@YAXXZ"),
        ("?x@@YAX", "V?$a@", 74, "H@@Z"),
        ("?x@@YAX", "PEAV?$a@", 43, "H@@Z"),
        ("?x@@YAX", "ACV?$a@E", 43, "H@@Z"),
        ("?x", "@??x", 38, "@@YAXXZ"),
        ("?x@@3Y0DOI@", "@", 967, "HA"),
        ("?", "?$", 82, "x"),
        ("?", "??", 41, "x"),
        ("?x@@3", "Y0A@", 29, "HA"),
        ("?x@@YAX", "$$CB", 107, "H@Z"),
        ("?x@@YAX", "$$A6AX", 30, "H@Z"),
    ];
    for (start, part, count, end) in forms {
        let name = |count| format!("{}{}{}", start, many(part, count), end);
        assert!(function(&name(count), CPP).is_some(), "{}", part);
        assert!(!check_name(&name(count + 1), CPP), "{}", part);
    }
    let long = |count| format!("?{}@@YAXXZ", many("x", count));
    assert_eq!(function(&long(20000), CPP), Some(format!("{}(void)", many("x", 20000))));
    assert!(function("?x@@YAXP6XV?$a@H@@00@Z1P6X11@Z2P6X22@Z3P6X33@Z@Z", CPP).is_some());
    let repeats = |count| format!("?x@@YAX{}@Z", many("0", count));
    assert!(function(&repeats(30), CPP).is_some());
    assert!(!check_name(&repeats(31), CPP));
    // The kinds of enumerations and of template arguments repeat nothing.
    let kinds = |count| format!("??$x@{}@@YAX{}@Z", many("$00", count), many("W4a@@", count));
    assert!(function(&kinds(15), CPP).is_some());
    assert!(check_name(&kinds(15), CPP));
    assert!(check_name(&format!("?x@@YAX{}@Z", many("W4a@@", 40)), CPP));
    assert!(!check_name(&format!("?x@@YAX{}@Z", many("_W4", 31)), CPP));
}

#[test]
fn msvc_numbers_and_letters_fit() {
    assert!(function("?$TSS123456789@?1??x@@YAXXZ@4HA", CPP).is_some());
    assert!(function("?$TSS12345678x", CPP).is_some());
    assert!(!check_name("?$TSS123456789x", CPP));
    assert!(!check_name("?$TSS123456789", CPP));
    assert!(!check_name("?$TSS1234567890@?1??x@@YAXXZ@4HA", CPP));
    assert!(function("??$a@$0IAAAAAAB@@@YAXXZ", CPP).is_some());
    assert!(!check_name("??$a@$0?IAAAAAAA@@@YAXXZ", CPP));
    assert!(function("??_C@_03A@abc?$AA@", CPP).is_some());
    assert!(!check_name("??_C@_03A@abc?$0A@", CPP));
    assert!(!check_name("??_C@_13A@abc?$A0@", CPP));
    // Without a string literal the same letters start a template.
    assert!(function("??$?0H@foo@@QAE@H@Z", CPP).is_some());
}

#[test]
fn itanium_components_without_names_are_bounded() {
    let operators = |count| format!("_ZN{}Ev", many("pl", count));
    let constructors = |count| format!("_ZN1a{}Ev", many("C1", count));
    let templates = |count| format!("_ZN1a{}Ev", many("IiE", count));
    for language in [CPP, OBJCPP, 0] {
        assert!(function(&operators(1024), language).is_some());
        assert!(function(&operators(1025), language).is_none());
        assert!(function(&constructors(1024), language).is_some());
        assert!(function(&constructors(1025), language).is_none());
        assert!(function(&templates(1024), language).is_some());
        assert!(function(&templates(1025), language).is_none());
    }
    assert!(function(&operators(5000), SWIFT).is_some());
    for start in ["__Z", "___Z", "____Z"] {
        assert!(!check_name(&format!("{}N{}Ev", start, many("pl", 1025)), 0));
    }
    assert!(check_name(&format!("_X{}", many("pl", 1025)), 0));
    assert!(!check_name(&format!("_X{}", many("pl", 1025)), CPP));
    // Names may be longer.
    let long = format!("_ZN{}E1xv", many("4some", 2000));
    assert!(function(&long, CPP).is_some());
    let nested = format!("_ZN{}1xEv", many("4some", 20));
    assert_eq!(function(&nested, CPP), Some(format!("{}x()", many("some::", 20))));
}

#[test]
fn swift_thunks_stand_behind_types() {
    let escaping = "thunk for @escaping @callee_guaranteed";
    let names = [
        ("$s4main4TypeV3fooyyF", "Type.foo()".to_owned()),
        ("$s4main3TRyC3fooyyF", "TRy.foo()".to_owned()),
        ("$s4main3TypC3TRyyyF", "Typ.TRy()".to_owned()),
        ("$s4main3fooyyxSTRzlF", "foo<A>(_:)".to_owned()),
        ("$s4main3fooQryFQOyQo_", "<<opaque return type of foo()>>.0".to_owned()),
        ("$sIeg_IeyB_TR", format!("{} () -> ()", escaping)),
        ("$sIeg_IeyB_Tr", format!("{} () -> ()", escaping)),
        ("$sSiIegy_SiIeyBy_TR", format!("{} (@unowned Int) -> ()", escaping)),
        ("$sxIegr_xIegn_lTR", format!("{} () -> (@out A)", escaping)),
    ];
    for (name, expected) in names {
        assert_eq!(function(name, SWIFT), Some(expected));
    }
    for part in ["TR", "Tr", "Ty"] {
        for start in ["_T0", "$S", "_$S", "$s", "_$s"] {
            assert!(!check_name(&format!("{}4main{}", start, part), SWIFT));
            assert!(!check_name(&format!("{}4main{}", start, part), 0));
            assert!(!check_name(&format!("{}{}", start, part), SWIFT));
            assert!(!check_name(&format!("{}Si_{}", start, part), SWIFT));
        }
        assert!(check_name(&format!("$t4main{}", part), SWIFT));
    }
    assert!(!check_name("$sIeg_IeyB_SiTy", SWIFT));
    // In full a thunk names two types.
    let full = |name| symbolication::check_name(name, SWIFT, DemangleFormat::Full);
    assert!(!full("$sIeg_IeyB_TR"));
    assert!(full("$s4main4TypeV3fooyyF"));
    assert_eq!(read_name("$sSiD", SWIFT, true, DemangleFormat::Full), "Swift.Int");
}

#[test]
fn swift_opaque_types_stand_behind_names() {
    assert!(check_name("$s4main1xQryFQOyQo_", SWIFT));
    assert!(!check_name("$syQo_", SWIFT));
    assert!(!check_name("$sySiQo_D", SWIFT));
    assert!(check_name("$sQo_", SWIFT));
}

#[test]
fn swift_identifiers_are_told_apart() {
    let ends = |identifier: &str, known: bool| {
        // A thunk without types is found exactly where the identifier ends before it.
        let inside = format!("$s{}TR", identifier);
        assert_eq!(check_name(&inside, SWIFT), known, "{}", identifier);
    };
    ends("3ab", true);
    ends("4ab", true);
    ends("2ab", false);
    ends("02abA", false);
    ends("4some0A3fTR", false);
    ends("4some0a1f0", false);
    ends("4some0A0", false);
    ends("004a_bc", false);
    ends("005a_bc", true);
    ends("003_abc", false);
    ends("004_abc", true);
    ends("002ab", false);
    ends("0abA", false);
    ends("0000000004", false);
    ends("99999999991", false);
    ends("3\u{e9}a", false);
}

#[test]
fn swift_parts_are_told_apart() {
    // Parts behind which a thunk without a type is found.
    for part in [
        "fA_", "fD", "g_", "HA_", "HC", "L_", "LL", "La", "Ma", "MXX", "QO", "SC", "So", "Tc", "Tg5",
        "Tgq5", "TK", "TKq", "Tv_", "Tf4n_n", "WP", "Wvd", "WOy", "XZ", "vg", "vau", "ig", "wCP", "oi",
        "Rz", "R_", "Rd__", "RlzU", "RLU", "Rmze_", "RMzE__", "AA", "AaA", "A_", "D", "E", "F", "K",
        "N", "Z", "d", "s", "y", "_",
    ] {
        assert!(!check_name(&format!("$sSi{}TR", part), SWIFT), "{}", part);
    }
    // Parts that take the letters of the thunk in.
    for part in ["A", "B", "H", "M", "Q", "Rlz", "S", "W", "X", "XM", "f", "i", "o", "v", "w", "."] {
        assert!(check_name(&format!("$s1a{}TR", part), SWIFT), "{}", part);
    }
    // Parts that make types.
    for part in ["C", "V", "O", "P", "a", "G", "m", "q_", "qz", "qd__", "q0_", "rl", "rz_l", "l", "Ieg_"] {
        assert!(check_name(&format!("$s1a{}TR", part), SWIFT), "{}", part);
    }
}

#[test]
fn swift_names_are_bounded() {
    let types = |count| format!("$sSi{}D", many("m", count));
    assert!(function(&types(254), SWIFT).is_some());
    assert!(!check_name(&types(255), SWIFT));
    assert!(!check_name(&types(255), 0));
    let identifiers = |count| format!("$s{}D", many("9some_name", count));
    assert!(function(&identifiers(255), SWIFT).is_some());
    assert!(!check_name(&identifiers(256), SWIFT));
    let repeated = |count| format!("$s1a{}", many("AA", count));
    assert!(function(&repeated(36), SWIFT).is_some());
    assert!(!check_name(&repeated(37), SWIFT));
    assert!(check_name("$s1aA36A", SWIFT));
    assert!(!check_name("$s1aA37A", SWIFT));
    assert!(!check_name("$s1aA30a7A", SWIFT));
    assert!(check_name("$sS256i", SWIFT));
    assert!(!check_name("$sS257i", SWIFT));
    let old = |count| format!("_Tt{}", many("G", count));
    assert!(function(&old(93), SWIFT).is_some());
    assert!(!check_name(&old(94), SWIFT));
    assert!(!check_name("$s\u{1}", SWIFT));
    assert!(!check_name("_T\u{c}", SWIFT));
    assert!(check_name("$s\u{d}", SWIFT));
    assert!(!check_name(&format!("$s65533{}", many("x", 65533)), SWIFT));
}
