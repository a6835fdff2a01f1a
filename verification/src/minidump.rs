//! Minidumps: what is fetched to walk their stacks, and the requests that they are turned into.

use std::sync::Arc;

use vstd::prelude::*;

use crate::arch::{Arch, CpuFamily, FrameTrust};
use crate::fetch::{fetch_for, fetch_for_object, FetchCache, FetchModel};
use crate::processor::{
    canonical_module_id, is_cfi_cache, parse_cfi_cache, CodeModule, CodeModuleId, CodeModuleModel,
    ProcessSummary, RegVal, SummaryModel, WalkedFrame, WalkedFrameModel, WalkedThread,
    WalkedThreadModel,
};
use crate::string_map::StringMap;
use crate::symcache::{cache_error_status, CacheContents, CacheErrorKind, ContentsModel};
use crate::text::same_text;
use crate::types::{
    unexamined, CompleteObjectInfo, HexValue, ObjectFileStatus, ObjectModel, ObjectType, RawFrame,
    RawFrameModel, RawObjectInfo, RawObjectModel, RawStacktrace, RawStacktraceModel, RequestModel,
    Scope, ScopeModel, SourceConfig, SourceModel, SymbolicateStacktraces, SystemInfo, SystemModel,
};
use crate::unwind::{check_cfi, is_sound_cfi};

verus! {

/// The type of object files on an operating system, by the name that a minidump has for it.
pub open spec fn image_type(os_name: Seq<char>) -> Seq<char> {
    if os_name == "Windows"@ || os_name == "Windows NT"@ {
        "pe"@
    } else if os_name == "iOS"@ || os_name == "Mac OS X"@ {
        "macho"@
    } else if os_name == "Linux"@ || os_name == "Solaris"@ || os_name == "Android"@ {
        "elf"@
    } else {
        "unknown"@
    }
}

/// The type of object files on an operating system, by the name that a minidump has for it.
pub fn get_image_type_from_minidump(minidump_os_name: &str) -> (r: &'static str)
    ensures
        r@ == image_type(minidump_os_name@),
{
    if same_text(minidump_os_name, "Windows") || same_text(minidump_os_name, "Windows NT") {
        "pe"
    } else if same_text(minidump_os_name, "iOS") || same_text(minidump_os_name, "Mac OS X") {
        "macho"
    } else if same_text(minidump_os_name, "Linux") || same_text(minidump_os_name, "Solaris")
        || same_text(minidump_os_name, "Android") {
        "elf"
    } else {
        "unknown"
    }
}

/// The name of an operating system, given the name that a minidump has for it.
pub open spec fn normalized_os_name(os_name: Seq<char>) -> Seq<char> {
    if os_name == "Windows NT"@ {
        "Windows"@
    } else if os_name == "Mac OS X"@ {
        "macOS"@
    } else {
        os_name
    }
}

/// The name of an operating system, given the name that a minidump has for it.
pub fn normalize_minidump_os_name(minidump_os_name: &str) -> (r: &str)
    ensures
        r@ == normalized_os_name(minidump_os_name@),
{
    if same_text(minidump_os_name, "Windows NT") {
        "Windows"
    } else if same_text(minidump_os_name, "Mac OS X") {
        "macOS"
    } else {
        minidump_os_name
    }
}

/// A normalized name stays as it is.
pub proof fn law_normalized_os_name(os_name: Seq<char>)
    ensures
        normalized_os_name(normalized_os_name(os_name)) == normalized_os_name(os_name),
{
    reveal_strlit("Windows NT");
    reveal_strlit("Windows");
    reveal_strlit("Mac OS X");
    reveal_strlit("macOS");
    assert("Windows"@.len() != "Windows NT"@.len());
    assert("Windows"@.len() != "Mac OS X"@.len());
    assert("macOS"@.len() != "Windows NT"@.len());
    assert("macOS"@.len() != "Mac OS X"@.len());
}

/// A size, where it is known.
pub open spec fn known_size(size: u64) -> Option<u64> {
    if size == 0 {
        None
    } else {
        Some(size)
    }
}

/// The object that a module of a minidump is.
pub open spec fn minidump_object(ty: Seq<char>, module: CodeModuleModel) -> RawObjectModel {
    RawObjectModel {
        ty,
        code_id: Some(module.code_identifier),
        code_file: Some(module.code_file),
        debug_id: Some(module.debug_identifier),
        debug_file: Some(module.debug_file),
        image_addr: module.base_address,
        image_size: known_size(module.size),
    }
}

/// The object that a module of a minidump is.
pub fn object_info_from_minidump_module(ty: ObjectType, module: &CodeModule) -> (r: RawObjectInfo)
    ensures
        r.deep_view() == minidump_object(ty.deep_view(), module.deep_view()),
{
    RawObjectInfo {
        ty,
        code_id: Some(module.code_identifier.clone()),
        code_file: Some(module.code_file.clone()),
        debug_id: Some(module.debug_identifier.clone()),
        debug_file: Some(module.debug_file.clone()),
        image_addr: HexValue(module.base_address),
        image_size: if module.size == 0 {
            None
        } else {
            Some(module.size)
        },
    }
}

/// The registers as a map from their names to their values.
pub open spec fn protocol_registers(registers: Seq<(Seq<char>, RegVal)>) -> Map<Seq<char>, u64>
    decreases registers.len(),
{
    if registers.len() == 0 {
        Map::empty()
    } else {
        let (name, value) = registers.last();
        protocol_registers(registers.drop_last()).insert(
            name,
            match value {
                RegVal::U32(value) => value as u64,
                RegVal::U64(value) => value,
            },
        )
    }
}

/// The registers as a map from their names to their values.
pub fn symbolic_registers_to_protocol_registers(registers: Vec<(String, RegVal)>) -> (r: StringMap<
    HexValue,
>)
    ensures
        r.deep_view() == protocol_registers(registers.deep_view()),
        registers.len() > 0 ==> {
            let (name, value) = registers@[registers.len() - 1];
            &&& r.deep_view().contains_key(name@)
            &&& value matches RegVal::U32(value) ==> r.deep_view()[name@] as int == value as int
            &&& value matches RegVal::U64(value) ==> r.deep_view()[name@] == value
        },
{
    let ghost given = registers@;
    let ghost model = registers.deep_view();
    let mut values: StringMap<HexValue> = StringMap::new();
    assert(values.deep_view() =~= protocol_registers(model.take(0)));
    for entry in it: registers
        invariant
            model.len() == it.seq().len(),
            forall|i: int| 0 <= i < model.len() ==> #[trigger] model[i] == it.seq()[i].deep_view(),
            values.deep_view() == protocol_registers(model.take(it.index())),
    {
        let (name, value) = entry;
        let ghost key = name@;
        let value: u64 = match value {
            RegVal::U32(value) => value as u64,
            RegVal::U64(value) => value,
        };
        let ghost before = values.deep_view();
        proof {
            let n = it.index();
            assert(model.take(n + 1).drop_last() =~= model.take(n));
            assert(model.take(n + 1).last() == model[n]);
        }
        values.insert(name, HexValue(value));
        assert(values.deep_view() =~= before.insert(key, value));
    }
    assert(model.take(model.len() as int) =~= model);
    proof {
        if given.len() > 0 {
            let last = given.len() - 1;
            assert(model[last] == given[last].deep_view());
            assert(model.last() == (given[last].0@, given[last].1));
        }
    }
    values
}

/// A file with the unwind information of an object file.
#[derive(Clone, Debug)]
pub struct CfiCacheFile {
    /// The contents of the file.
    pub contents: CacheContents,
}

/// What parsing a file with unwind information gives: the information, or nothing where the object
/// file was not found.
pub open spec fn parsed_cfi(contents: ContentsModel) -> Result<Option<Seq<u8>>, CacheErrorKind> {
    match contents {
        ContentsModel::Negative => Ok(None),
        ContentsModel::Malformed => Err(CacheErrorKind::ObjectParsing),
        ContentsModel::Positive(data) => if is_cfi_cache(data) {
            Ok(Some(data))
        } else {
            Err(CacheErrorKind::Other)
        },
    }
}

impl CfiCacheFile {
    /// Parses the file. Gives the unwind information, or nothing where the object file was not
    /// found.
    pub fn parse(self) -> (r: Result<Option<Vec<u8>>, CacheErrorKind>)
        ensures
            match r {
                Ok(parsed) => parsed_cfi(self.contents.deep_view()) == Ok::<
                    Option<Seq<u8>>,
                    CacheErrorKind,
                >(
                    match parsed {
                        Some(data) => Some(data@),
                        None => None,
                    },
                ),
                Err(kind) => parsed_cfi(self.contents.deep_view()) == Err::<
                    Option<Seq<u8>>,
                    CacheErrorKind,
                >(kind),
            },
    {
        match self.contents {
            CacheContents::Negative => Ok(None),
            CacheContents::Malformed => Err(CacheErrorKind::ObjectParsing),
            CacheContents::Positive(data) => if parse_cfi_cache(data.as_slice()) {
                Ok(Some(data))
            } else {
                Err(CacheErrorKind::Other)
            },
        }
    }
}

/// What came of fetching unwind information for a module.
pub type CfiOutcome = (CodeModuleId, Result<CfiCacheFile, CacheErrorKind>);

/// The model of a [`CfiOutcome`].
pub type CfiOutcomeModel = (Seq<char>, Result<ContentsModel, CacheErrorKind>);

/// The model of an outcome.
pub open spec fn cfi_outcome_model(outcome: CfiOutcome) -> CfiOutcomeModel {
    (
        outcome.0.deep_view(),
        match outcome.1 {
            Ok(file) => Ok(file.contents.deep_view()),
            Err(kind) => Err(kind),
        },
    )
}

/// The model of outcomes.
pub open spec fn cfi_outcomes(outcomes: Seq<CfiOutcome>) -> Seq<CfiOutcomeModel> {
    outcomes.map_values(|outcome: CfiOutcome| cfi_outcome_model(outcome))
}

/// The unwind information that an outcome holds: none where it could not be had.
pub open spec fn cfi_of(
    outcome: Result<ContentsModel, CacheErrorKind>,
) -> Result<Option<Seq<u8>>, CacheErrorKind> {
    match outcome {
        Ok(contents) => parsed_cfi(contents),
        Err(kind) => Err(kind),
    }
}

/// What an outcome says of the object file.
pub open spec fn unwind_status(
    outcome: Result<ContentsModel, CacheErrorKind>,
) -> ObjectFileStatus {
    match cfi_of(outcome) {
        Ok(Some(_)) => ObjectFileStatus::Found,
        Ok(None) => ObjectFileStatus::Missing,
        Err(kind) => cache_error_status(kind),
    }
}

/// For each module, what the outcome says of the object file. A later outcome replaces an earlier
/// one for the same module.
pub open spec fn unwind_statuses(outcomes: Seq<CfiOutcomeModel>) -> Map<
    Seq<char>,
    ObjectFileStatus,
>
    decreases outcomes.len(),
{
    if outcomes.len() == 0 {
        Map::empty()
    } else {
        unwind_statuses(outcomes.drop_last()).insert(
            outcomes.last().0,
            unwind_status(outcomes.last().1),
        )
    }
}

/// The unwind information that an outcome holds and that the stack walker can be given.
pub open spec fn walkable_cfi(outcome: Result<ContentsModel, CacheErrorKind>) -> Option<Seq<u8>> {
    match cfi_of(outcome) {
        Ok(Some(data)) => if is_sound_cfi(data) {
            Some(data)
        } else {
            None
        },
        _ => None,
    }
}

/// For each module, the unwind information that was found and that the stack walker can be given.
/// Later information replaces earlier one for the same module.
pub open spec fn frame_infos(outcomes: Seq<CfiOutcomeModel>) -> Map<Seq<char>, Seq<u8>>
    decreases outcomes.len(),
{
    if outcomes.len() == 0 {
        Map::empty()
    } else {
        let before = frame_infos(outcomes.drop_last());
        match walkable_cfi(outcomes.last().1) {
            Some(data) => before.insert(outcomes.last().0, data),
            None => before,
        }
    }
}

/// What became of the object file of a module is what the last outcome for the module says.
pub proof fn law_unwind_statuses(outcomes: Seq<CfiOutcomeModel>, i: int)
    requires
        0 <= i < outcomes.len(),
        forall|j: int| i < j < outcomes.len() ==> (#[trigger] outcomes[j]).0 != outcomes[i].0,
    ensures
        unwind_statuses(outcomes).contains_key(outcomes[i].0),
        unwind_statuses(outcomes)[outcomes[i].0] == unwind_status(outcomes[i].1),
    decreases outcomes.len(),
{
    let rest = outcomes.drop_last();
    if i + 1 < outcomes.len() {
        assert(outcomes[outcomes.len() - 1].0 != outcomes[i].0);
        assert forall|j: int| i < j < rest.len() implies (#[trigger] rest[j]).0 != rest[i].0 by {
            assert(outcomes[j].0 != outcomes[i].0);
        }
        law_unwind_statuses(rest, i);
    }
}

/// Where no two outcomes are for the same module, there is unwind information for exactly those
/// modules whose outcomes hold some that the stack walker can be given, and it is what they hold. The
/// object files of these modules were found.
pub proof fn law_frame_infos(outcomes: Seq<CfiOutcomeModel>, id: Seq<char>)
    requires
        forall|i: int, j: int|
            0 <= i < j < outcomes.len() ==> (#[trigger] outcomes[i]).0 != (
            #[trigger] outcomes[j]).0,
    ensures
        frame_infos(outcomes).contains_key(id) <==> exists|i: int|
            0 <= i < outcomes.len() && (#[trigger] outcomes[i]).0 == id && walkable_cfi(
                outcomes[i].1,
            ) is Some,
        frame_infos(outcomes).contains_key(id) ==> exists|i: int|
            0 <= i < outcomes.len() && (#[trigger] outcomes[i]).0 == id && walkable_cfi(
                outcomes[i].1,
            ) == Some(frame_infos(outcomes)[id]),
        frame_infos(outcomes).contains_key(id) ==> unwind_statuses(outcomes).contains_key(id)
            && unwind_statuses(outcomes)[id] == ObjectFileStatus::Found,
        unwind_statuses(outcomes).contains_key(id) <==> exists|i: int|
            0 <= i < outcomes.len() && (#[trigger] outcomes[i]).0 == id,
    decreases outcomes.len(),
{
    if outcomes.len() > 0 {
        let n = outcomes.len() - 1;
        let rest = outcomes.drop_last();
        assert forall|i: int, j: int| 0 <= i < j < rest.len() implies (#[trigger] rest[i]).0 != (
        #[trigger] rest[j]).0 by {
            assert(outcomes[i].0 != outcomes[j].0);
        }
        law_frame_infos(rest, id);
        if outcomes[n].0 == id {
            assert forall|i: int| 0 <= i < rest.len() implies (#[trigger] rest[i]).0 != id by {
                assert(outcomes[i].0 != outcomes[n].0);
            }
            assert(!unwind_statuses(rest).contains_key(id));
            assert(!frame_infos(rest).contains_key(id));
        } else {
            if unwind_statuses(rest).contains_key(id) {
                let i = choose|i: int| 0 <= i < rest.len() && (#[trigger] rest[i]).0 == id;
                assert(outcomes[i].0 == id);
            }
            if frame_infos(rest).contains_key(id) {
                let i = choose|i: int|
                    0 <= i < rest.len() && (#[trigger] rest[i]).0 == id && walkable_cfi(rest[i].1)
                        == Some(frame_infos(rest)[id]);
                assert(outcomes[i] == rest[i]);
            }
            if exists|i: int| 0 <= i < outcomes.len() && (#[trigger] outcomes[i]).0 == id {
                let i = choose|i: int| 0 <= i < outcomes.len() && (#[trigger] outcomes[i]).0 == id;
                assert(rest[i].0 == id);
            }
        }
    }
}

/// What was found to walk stacks with.
pub struct UnwindInfo {
    /// The unwind information of each module for which it was found.
    pub frame_infos: StringMap<Vec<u8>>,
    /// What became of the object file of each module that was searched.
    pub statuses: StringMap<ObjectFileStatus>,
}

/// The unwind information as bytes.
pub open spec fn infos_model(infos: StringMap<Vec<u8>>) -> Map<Seq<char>, Seq<u8>> {
    infos@.map_values(|cfi: Vec<u8>| cfi@)
}

/// Whether the unwind information can be used to walk stacks.
pub open spec fn infos_usable(infos: Map<Seq<char>, Seq<u8>>) -> bool {
    forall|id: Seq<char>| #[trigger]
        infos.contains_key(id) ==> canonical_module_id(id) == Some(id) && is_cfi_cache(infos[id])
            && is_sound_cfi(infos[id])
}

/// Collects what was found to walk stacks with. Unwind information that the stack walker cannot be
/// given is left out.
pub fn collect_unwind_info(outcomes: Vec<CfiOutcome>) -> (r: UnwindInfo)
    ensures
        infos_model(r.frame_infos) == frame_infos(cfi_outcomes(outcomes@)),
        infos_usable(infos_model(r.frame_infos)),
        r.statuses.deep_view() == unwind_statuses(cfi_outcomes(outcomes@)),
{
    let ghost model = cfi_outcomes(outcomes@);
    let mut infos: StringMap<Vec<u8>> = StringMap::new();
    let mut statuses: StringMap<ObjectFileStatus> = StringMap::new();
    assert(infos_model(infos) =~= frame_infos(model.take(0)));
    assert(statuses.deep_view() =~= unwind_statuses(model.take(0)));
    for outcome in it: outcomes
        invariant
            model.len() == it.seq().len(),
            forall|i: int|
                0 <= i < model.len() ==> #[trigger] model[i] == cfi_outcome_model(it.seq()[i]),
            infos_model(infos) == frame_infos(model.take(it.index())),
            infos_usable(infos_model(infos)),
            statuses.deep_view() == unwind_statuses(model.take(it.index())),
    {
        let ghost last = cfi_outcome_model(outcome);
        proof {
            let n = it.index();
            assert(model.take(n + 1).drop_last() =~= model.take(n));
            assert(model.take(n + 1).last() == last);
        }
        let (id, result) = outcome;
        let id: &str = id.as_str();
        let parsed: Result<Option<Vec<u8>>, CacheErrorKind> = match result {
            Ok(file) => file.parse(),
            Err(kind) => Err(kind),
        };
        let ghost infos_before = infos_model(infos);
        let ghost statuses_before = statuses.deep_view();
        let status: ObjectFileStatus = match parsed {
            Ok(Some(data)) => {
                if check_cfi(data.as_slice()) {
                    let ghost bytes = data@;
                    infos.insert(id.to_owned(), data);
                    assert(infos_model(infos) =~= infos_before.insert(id@, bytes));
                }
                ObjectFileStatus::Found
            },
            Ok(None) => ObjectFileStatus::Missing,
            Err(kind) => ObjectFileStatus::from(kind),
        };
        statuses.insert(id.to_owned(), status);
        assert(statuses.deep_view() =~= statuses_before.insert(id@, status));
    }
    assert(model.take(model.len() as int) =~= model);
    UnwindInfo { frame_infos: infos, statuses }
}

/// Whether a module has an identifier.
pub open spec fn is_identified(module: CodeModuleModel) -> bool {
    canonical_module_id(module.debug_identifier) is Some
}

/// The requests for the unwind information of modules, with the identifiers of the modules. There is
/// none for a module without an identifier.
pub open spec fn cfi_fetches_of(
    os_name: Seq<char>,
    modules: Seq<CodeModuleModel>,
    sources: Seq<SourceModel>,
    scope: ScopeModel,
) -> Seq<(Seq<char>, FetchModel)> {
    modules.filter(|module: CodeModuleModel| is_identified(module)).map_values(
        |module: CodeModuleModel|
            (
                canonical_module_id(module.debug_identifier)->0,
                fetch_for(minidump_object(image_type(os_name), module), sources, scope),
            ),
    )
}

/// Whether no two modules have the same identifier.
pub open spec fn identifiers_differ(modules: Seq<CodeModuleModel>) -> bool {
    forall|i: int, j: int|
        0 <= i < j < modules.len() ==> canonical_module_id(
            (#[trigger] modules[i]).debug_identifier,
        ) != canonical_module_id((#[trigger] modules[j]).debug_identifier)
}

/// The requests for the unwind information of modules, with the identifiers of the modules. There is
/// none for a module without an identifier.
pub fn cfi_fetches(
    os_name: &str,
    modules: Vec<CodeModule>,
    sources: &Arc<Vec<SourceConfig>>,
    scope: &Scope,
) -> (r: Vec<(CodeModuleId, FetchCache)>)
    ensures
        r.deep_view() == cfi_fetches_of(
            os_name@,
            modules.deep_view(),
            sources.deep_view(),
            scope.deep_view(),
        ),
        identifiers_differ(modules.deep_view()) ==> forall|i: int, j: int|
            0 <= i < j < r.len() ==> (#[trigger] r@[i]).0.deep_view() != (
            #[trigger] r@[j]).0.deep_view(),
{
    let object_type = ObjectType(get_image_type_from_minidump(os_name).to_owned());
    let ghost model = modules.deep_view();
    let ghost identified = |module: CodeModuleModel| is_identified(module);
    let ghost fetch = |module: CodeModuleModel|
        (
            canonical_module_id(module.debug_identifier)->0,
            fetch_for(
                minidump_object(image_type(os_name@), module),
                sources.deep_view(),
                scope.deep_view(),
            ),
        );
    let mut fetches: Vec<(CodeModuleId, FetchCache)> = Vec::new();
    assert(model.take(0).filter(identified) =~= Seq::empty());
    assert(fetches.deep_view() =~= model.take(0).filter(identified).map_values(fetch));
    for module in it: modules
        invariant
            object_type.deep_view() == image_type(os_name@),
            model.len() == it.seq().len(),
            forall|i: int| 0 <= i < model.len() ==> #[trigger] model[i] == it.seq()[i].deep_view(),
            identified == (|module: CodeModuleModel| is_identified(module)),
            fetch == (|module: CodeModuleModel|
                (
                    canonical_module_id(module.debug_identifier)->0,
                    fetch_for(
                        minidump_object(image_type(os_name@), module),
                        sources.deep_view(),
                        scope.deep_view(),
                    ),
                )),
            fetches.deep_view() == model.take(it.index()).filter(identified).map_values(fetch),
            forall|k: int|
                #![trigger fetches@[k]]
                0 <= k < fetches.len() ==> exists|m: int|
                    0 <= m < it.index() && canonical_module_id(
                        (#[trigger] model[m]).debug_identifier,
                    ) == Some(fetches@[k].0.deep_view()),
            identifiers_differ(model) ==> forall|i: int, j: int|
                0 <= i < j < fetches.len() ==> (#[trigger] fetches@[i]).0.deep_view() != (
                #[trigger] fetches@[j]).0.deep_view(),
    {
        let ghost n = it.index();
        let ghost before = fetches@;
        proof {
            reveal(Seq::filter);
            assert(model.take(n + 1).drop_last() =~= model.take(n));
            assert(model.take(n + 1).last() == model[n]);
        }
        match CodeModuleId::parse(module.debug_identifier.as_str()) {
            Some(id) => {
                let info = object_info_from_minidump_module(object_type.copy(), &module);
                let ghost done = fetches.deep_view();
                fetches.push((id, fetch_for_object(&info, sources, scope)));
                assert(fetches.deep_view() =~= done.push(fetch(model[n])));
                proof {
                    let kept = model.take(n).filter(identified);
                    assert(model.take(n + 1).filter(identified) == kept.push(model[n]));
                    assert(fetches.deep_view() =~= kept.push(model[n]).map_values(fetch));
                    assert forall|k: int|
                        #![trigger fetches@[k]]
                        0 <= k < fetches.len() implies exists|m: int|
                        0 <= m < n + 1 && canonical_module_id(
                            (#[trigger] model[m]).debug_identifier,
                        ) == Some(fetches@[k].0.deep_view()) by {
                        if k < before.len() {
                            assert(fetches@[k] == before[k]);
                        } else {
                            assert(canonical_module_id(model[n].debug_identifier) is Some);
                        }
                    }
                    if identifiers_differ(model) {
                        assert forall|i: int, j: int|
                            0 <= i < j < fetches.len() implies (
                        #[trigger] fetches@[i]).0.deep_view() != (
                        #[trigger] fetches@[j]).0.deep_view() by {
                            assert(fetches@[i] == before[i]);
                            if j < before.len() {
                                assert(fetches@[j] == before[j]);
                            } else {
                                let m = choose|m: int|
                                    0 <= m < n && canonical_module_id(
                                        (#[trigger] model[m]).debug_identifier,
                                    ) == Some(before[i].0.deep_view());
                                assert(canonical_module_id(model[m].debug_identifier)
                                    != canonical_module_id(model[n].debug_identifier));
                            }
                        }
                    }
                }
            },
            None => {},
        }
    }
    assert(model.take(model.len() as int) =~= model);
    fetches
}

/// The module of a minidump, with what became of its unwind information. It was not needed where it
/// was not searched.
pub open spec fn walked_module(
    ty: Seq<char>,
    statuses: Map<Seq<char>, ObjectFileStatus>,
    module: CodeModuleModel,
) -> ObjectModel {
    let id = canonical_module_id(module.debug_identifier)->0;
    ObjectModel {
        unwind_status: Some(
            if statuses.contains_key(id) {
                statuses[id]
            } else {
                ObjectFileStatus::Unused
            },
        ),
        ..unexamined(minidump_object(ty, module))
    }
}

/// The modules of a minidump that have an identifier, with what became of their unwind information.
pub open spec fn walked_modules(
    ty: Seq<char>,
    statuses: Map<Seq<char>, ObjectFileStatus>,
    modules: Seq<CodeModuleModel>,
) -> Seq<ObjectModel> {
    modules.filter(|module: CodeModuleModel| is_identified(module)).map_values(
        |module: CodeModuleModel| walked_module(ty, statuses, module),
    )
}

/// The modules of a minidump that have an identifier, with what became of their unwind information.
pub fn objects_from_minidump_modules(
    ty: ObjectType,
    statuses: &StringMap<ObjectFileStatus>,
    modules: Vec<CodeModule>,
) -> (r: Vec<CompleteObjectInfo>)
    ensures
        r.deep_view() == walked_modules(
            ty.deep_view(),
            statuses.deep_view(),
            modules.deep_view(),
        ),
{
    let ghost model = modules.deep_view();
    let ghost identified = |module: CodeModuleModel| is_identified(module);
    let ghost walked = |module: CodeModuleModel|
        walked_module(ty.deep_view(), statuses.deep_view(), module);
    let mut objects: Vec<CompleteObjectInfo> = Vec::new();
    assert(model.take(0).filter(identified) =~= Seq::empty());
    assert(objects.deep_view() =~= model.take(0).filter(identified).map_values(walked));
    for module in it: modules
        invariant
            model.len() == it.seq().len(),
            forall|i: int| 0 <= i < model.len() ==> #[trigger] model[i] == it.seq()[i].deep_view(),
            identified == (|module: CodeModuleModel| is_identified(module)),
            walked == (|module: CodeModuleModel|
                walked_module(ty.deep_view(), statuses.deep_view(), module)),
            objects.deep_view() == model.take(it.index()).filter(identified).map_values(walked),
    {
        let ghost n = it.index();
        proof {
            reveal(Seq::filter);
            assert(model.take(n + 1).drop_last() =~= model.take(n));
            assert(model.take(n + 1).last() == model[n]);
        }
        match CodeModuleId::parse(module.debug_identifier.as_str()) {
            Some(id) => {
                let status: ObjectFileStatus = match statuses.get(id.as_str()) {
                    Some(status) => *status,
                    None => ObjectFileStatus::Unused,
                };
                let raw = object_info_from_minidump_module(ty.copy(), &module);
                let mut info = CompleteObjectInfo::from(raw);
                info.unwind_status = Some(status);
                let ghost done = objects.deep_view();
                objects.push(info);
                assert(objects.deep_view() =~= done.push(walked(model[n])));
                proof {
                    let kept = model.take(n).filter(identified);
                    assert(model.take(n + 1).filter(identified) == kept.push(model[n]));
                    assert(objects.deep_view() =~= kept.push(model[n]).map_values(walked));
                }
            },
            None => {},
        }
    }
    assert(model.take(model.len() as int) =~= model);
    objects
}

/// What the stack walker took off a return address, so as to be inside the call: it is added again.
pub open spec fn return_offset(family: CpuFamily) -> u64 {
    match family {
        CpuFamily::Arm32 => 2,
        CpuFamily::Arm64 => 4,
        _ => 0,
    }
}

/// What the stack walker took off a return address.
pub(crate) fn taken_off(family: CpuFamily) -> (r: u64)
    ensures
        r == return_offset(family),
{
    match family {
        CpuFamily::Arm32 => 2,
        CpuFamily::Arm64 => 4,
        _ => 0,
    }
}

/// A thread that was walked, with the registers of its first frame.
pub type ThreadWithRegisters = (WalkedThread, Vec<(String, RegVal)>);

/// The model of a [`ThreadWithRegisters`].
pub type ThreadWithRegistersModel = (WalkedThreadModel, Seq<(Seq<char>, RegVal)>);

/// Whether all return addresses of a thread fit once what was taken off is added again.
pub open spec fn returns_fit(arch: Arch, frames: Seq<WalkedFrameModel>) -> bool {
    forall|i: int|
        0 <= i < frames.len() ==> (#[trigger] frames[i]).return_address + return_offset(
            arch.family(),
        ) <= u64::MAX
}

/// Whether all return addresses of all threads fit once what was taken off is added again.
pub open spec fn all_returns_fit(arch: Arch, threads: Seq<ThreadWithRegistersModel>) -> bool {
    forall|i: int| 0 <= i < threads.len() ==> returns_fit(arch, (#[trigger] threads[i]).0.frames)
}

/// The frame of a stack trace that a walked frame is.
pub open spec fn walked_frame(arch: Arch, frame: WalkedFrameModel) -> RawFrameModel {
    RawFrameModel {
        instruction_addr: (frame.return_address + return_offset(arch.family())) as u64,
        package: frame.code_file,
        trust: FrameTrust::spec_from_code(frame.trust),
    }
}

/// The stack trace that a walked thread is.
pub open spec fn walked_stacktrace(
    arch: Arch,
    thread: ThreadWithRegistersModel,
) -> RawStacktraceModel {
    RawStacktraceModel {
        registers: protocol_registers(thread.1),
        frames: thread.0.frames.map_values(|frame: WalkedFrameModel| walked_frame(arch, frame)),
    }
}

/// The stack trace that a walked thread is.
pub fn stacktrace_from_thread(
    arch: Arch,
    frames: Vec<WalkedFrame>,
    registers: Vec<(String, RegVal)>,
) -> (r: RawStacktrace)
    requires
        returns_fit(arch, frames.deep_view()),
    ensures
        forall|thread_id: u32|
            r.deep_view() == #[trigger] walked_stacktrace(
                arch,
                (
                    WalkedThreadModel { thread_id, frames: frames.deep_view() },
                    registers.deep_view(),
                ),
            ),
{
    let offset: u64 = taken_off(arch.cpu_family());
    let ghost model = frames.deep_view();
    let mut raw: Vec<RawFrame> = Vec::new();
    for frame in it: frames
        invariant
            offset == return_offset(arch.family()),
            returns_fit(arch, model),
            model.len() == it.seq().len(),
            forall|i: int| 0 <= i < model.len() ==> #[trigger] model[i] == it.seq()[i].deep_view(),
            raw.len() == it.index(),
            forall|i: int|
                0 <= i < raw.len() ==> (#[trigger] raw@[i]).deep_view() == walked_frame(
                    arch,
                    model[i],
                ),
    {
        assert(model[raw.len() as int] == frame.deep_view());
        raw.push(
            RawFrame {
                instruction_addr: HexValue(frame.return_address + offset),
                package: frame.code_file,
                trust: FrameTrust::from_code(frame.trust),
            },
        );
    }
    assert(raw.deep_view() =~= model.map_values(
        |frame: WalkedFrameModel| walked_frame(arch, frame),
    ));
    RawStacktrace {
        registers: symbolic_registers_to_protocol_registers(registers),
        frames: raw,
    }
}

/// What a minidump says of the process beside its modules and stacks.
#[derive(Debug)]
pub struct MinidumpState {
    /// When the minidump was made.
    pub timestamp: u64,
    /// The system that the process ran on.
    pub system_info: SystemInfo,
    /// Whether the process crashed.
    pub crashed: bool,
    /// Why the process crashed.
    pub crash_reason: String,
    /// The assertion that failed.
    pub assertion: String,
    /// The index of the thread that crashed or asked for the minidump.
    pub requesting_thread_index: Option<usize>,
    /// The identifiers of the threads.
    pub thread_ids: Vec<u32>,
}

/// The model of a [`MinidumpState`].
pub struct MinidumpModel {
    pub timestamp: u64,
    pub system_info: SystemModel,
    pub crashed: bool,
    pub crash_reason: Seq<char>,
    pub assertion: Seq<char>,
    pub requesting_thread_index: Option<usize>,
    pub thread_ids: Seq<u32>,
}

impl DeepView for MinidumpState {
    type V = MinidumpModel;

    open spec fn deep_view(&self) -> MinidumpModel {
        MinidumpModel {
            timestamp: self.timestamp,
            system_info: self.system_info.deep_view(),
            crashed: self.crashed,
            crash_reason: self.crash_reason@,
            assertion: self.assertion@,
            requesting_thread_index: self.requesting_thread_index,
            thread_ids: self.thread_ids@,
        }
    }
}

/// What a minidump says of the process beside its modules and stacks.
pub open spec fn state_of_minidump(
    summary: SummaryModel,
    arch: Arch,
    threads: Seq<ThreadWithRegistersModel>,
) -> MinidumpModel {
    MinidumpModel {
        timestamp: summary.timestamp,
        system_info: SystemModel {
            os_name: normalized_os_name(summary.os_name),
            os_version: summary.os_version,
            os_build: summary.os_build,
            cpu_arch: arch,
            device_model: Seq::empty(),
        },
        crashed: summary.crashed,
        crash_reason: summary.crash_reason,
        assertion: summary.assertion,
        requesting_thread_index: if summary.requesting_thread >= 0 {
            Some(summary.requesting_thread as usize)
        } else {
            None
        },
        thread_ids: threads.map_values(|thread: ThreadWithRegistersModel| thread.0.thread_id),
    }
}

/// The request that a walked minidump is turned into.
pub open spec fn request_of_minidump(
    summary: SummaryModel,
    arch: Arch,
    modules: Seq<CodeModuleModel>,
    threads: Seq<ThreadWithRegistersModel>,
    statuses: Map<Seq<char>, ObjectFileStatus>,
    scope: ScopeModel,
    sources: Seq<SourceModel>,
) -> RequestModel {
    RequestModel {
        scope,
        signal: None,
        sources,
        stacktraces: threads.map_values(
            |thread: ThreadWithRegistersModel| walked_stacktrace(arch, thread),
        ),
        modules: walked_modules(image_type(summary.os_name), statuses, modules),
    }
}

/// Turns a walked minidump into a request.
pub fn minidump_request(
    summary: ProcessSummary,
    arch: Arch,
    modules: Vec<CodeModule>,
    threads: Vec<ThreadWithRegisters>,
    statuses: &StringMap<ObjectFileStatus>,
    scope: Scope,
    sources: Arc<Vec<SourceConfig>>,
) -> (r: (SymbolicateStacktraces, MinidumpState))
    requires
        all_returns_fit(arch, threads.deep_view()),
    ensures
        r.0.deep_view() == request_of_minidump(
            summary.deep_view(),
            arch,
            modules.deep_view(),
            threads.deep_view(),
            statuses.deep_view(),
            scope.deep_view(),
            sources.deep_view(),
        ),
        r.1.deep_view() == state_of_minidump(summary.deep_view(), arch, threads.deep_view()),
{
    let object_type = ObjectType(
        get_image_type_from_minidump(summary.os_name.as_str()).to_owned(),
    );
    let modules = objects_from_minidump_modules(object_type, statuses, modules);
    let ghost model = threads.deep_view();
    let mut stacktraces: Vec<RawStacktrace> = Vec::new();
    let mut thread_ids: Vec<u32> = Vec::new();
    for thread in it: threads
        invariant
            all_returns_fit(arch, model),
            model.len() == it.seq().len(),
            forall|i: int| 0 <= i < model.len() ==> #[trigger] model[i] == it.seq()[i].deep_view(),
            stacktraces.len() == it.index(),
            thread_ids.len() == it.index(),
            forall|i: int|
                0 <= i < stacktraces.len() ==> (#[trigger] stacktraces@[i]).deep_view()
                    == walked_stacktrace(arch, model[i]),
            forall|i: int|
                0 <= i < thread_ids.len() ==> #[trigger] thread_ids@[i] == model[i].0.thread_id,
    {
        let ghost walked = thread.deep_view();
        assert(model[stacktraces.len() as int] == walked);
        let (thread, registers) = thread;
        thread_ids.push(thread.thread_id);
        let stacktrace = stacktrace_from_thread(arch, thread.frames, registers);
        assert(stacktrace.deep_view() == walked_stacktrace(
            arch,
            (
                WalkedThreadModel { thread_id: walked.0.thread_id, frames: walked.0.frames },
                walked.1,
            ),
        ));
        stacktraces.push(stacktrace);
    }
    assert(stacktraces.deep_view() =~= model.map_values(
        |thread: ThreadWithRegistersModel| walked_stacktrace(arch, thread),
    ));
    assert(thread_ids@ =~= model.map_values(
        |thread: ThreadWithRegistersModel| thread.0.thread_id,
    ));
    let mut system_info = SystemInfo::default();
    system_info.os_name = normalize_minidump_os_name(summary.os_name.as_str()).to_owned();
    system_info.os_version = summary.os_version;
    system_info.os_build = summary.os_build;
    system_info.cpu_arch = arch;
    let state = MinidumpState {
        timestamp: summary.timestamp,
        system_info,
        crashed: summary.crashed,
        crash_reason: summary.crash_reason,
        assertion: summary.assertion,
        requesting_thread_index: if summary.requesting_thread >= 0 {
            Some(summary.requesting_thread as usize)
        } else {
            None
        },
        thread_ids,
    };
    (SymbolicateStacktraces { scope, signal: None, sources, stacktraces, modules }, state)
}

} // verus!
