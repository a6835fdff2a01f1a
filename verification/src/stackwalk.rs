//! Walking the stacks of minidumps.

use std::sync::Arc;

use vstd::prelude::*;

use crate::arch::{arch_of_name, Arch};
use crate::fetch::FetchCache;
use crate::layout::{can_be_read, check_lists, check_readable, has_lists};
use crate::minidump::{
    all_returns_fit, cfi_fetches, cfi_fetches_of, cfi_outcomes, collect_unwind_info, frame_infos,
    identifiers_differ, infos_model, minidump_request, request_of_minidump, return_offset,
    returns_fit, state_of_minidump, unwind_statuses, CfiOutcome, MinidumpState, ThreadWithRegisters,
    ThreadWithRegistersModel,
};
use crate::processor::{
    dump_modules, dump_referenced_modules, dump_registers, dump_summary, dump_threads, failure_text,
    infos_map, is_usable, minidump_result, process_minidump, process_modules,
    process_referenced_modules, process_registers, process_summary, process_threads, state_dump,
    state_frame_infos, CodeModuleId, RegVal, WalkedThread,
};
use crate::response::SymbolicationError;
use crate::string_map::lemma_entry;
use crate::types::{Scope, SourceConfig, SymbolicateStacktraces};

verus! {

/// Whether an error says what the stack walker made of a minidump.
pub open spec fn is_minidump_failure(err: SymbolicationError, result: u32) -> bool {
    err matches SymbolicationError::Minidump(err) && forall|text: String| #[trigger]
        vstd::string::to_string_from_display_ensures(&err, text) ==> text@ == failure_text(result)
}

/// The requests for the unwind information that is needed to walk the stacks of a minidump, with
/// the identifiers of the modules. They are for the modules that frames belong to, as far as can be
/// told without unwind information. No module is requested twice. There is no result where the stack
/// walker cannot be given the minidump, or finds no modules or no threads in it.
pub fn cfi_to_fetch(dump: &[u8], sources: &Arc<Vec<SourceConfig>>, scope: &Scope) -> (r: Option<
    Result<Vec<(CodeModuleId, FetchCache)>, SymbolicationError>,
>)
    ensures
        match r {
            Some(Ok(fetches)) => {
                &&& can_be_read(dump@)
                &&& is_usable(minidump_result(dump@, Map::empty()))
                &&& has_lists(dump@)
                &&& fetches.deep_view() == cfi_fetches_of(
                    dump_summary(dump@, Map::empty()).os_name,
                    dump_referenced_modules(dump@, Map::empty()),
                    sources.deep_view(),
                    scope.deep_view(),
                )
                &&& forall|i: int, j: int|
                    0 <= i < j < fetches.len() ==> (#[trigger] fetches@[i]).0.deep_view() != (
                    #[trigger] fetches@[j]).0.deep_view()
            },
            Some(Err(err)) => {
                &&& can_be_read(dump@)
                &&& !is_usable(minidump_result(dump@, Map::empty()))
                &&& is_minidump_failure(err, minidump_result(dump@, Map::empty()))
            },
            None => can_be_read(dump@) ==> is_usable(minidump_result(dump@, Map::empty()))
                && !has_lists(dump@),
        },
{
    if !check_readable(dump) {
        return None;
    }
    let no_infos: Vec<(String, Vec<u8>)> = Vec::new();
    assert(infos_map(no_infos@) =~= Map::empty());
    match process_minidump(dump, no_infos.as_slice()) {
        Ok(state) => {
            if !check_lists(dump) {
                return None;
            }
            let summary = process_summary(&state);
            let modules = process_referenced_modules(&state);
            assert(identifiers_differ(modules.deep_view()));
            Some(Ok(cfi_fetches(summary.os_name.as_str(), modules, sources, scope)))
        },
        Err(err) => Some(Err(SymbolicationError::from(err))),
    }
}

/// The architecture that a minidump names.
pub open spec fn dump_arch(dump: Seq<u8>, infos: Map<Seq<char>, Seq<u8>>) -> Arch {
    arch_of_name(dump_summary(dump, infos).cpu_family)
}

/// The registers of the first frame of a thread. There are none where there is no frame.
pub open spec fn first_registers(
    dump: Seq<u8>,
    infos: Map<Seq<char>, Seq<u8>>,
    thread: int,
) -> Seq<(Seq<char>, RegVal)> {
    if dump_threads(dump, infos)[thread].frames.len() == 0 {
        Seq::empty()
    } else {
        dump_registers(dump, infos, thread, 0, dump_arch(dump, infos).spec_code())
    }
}

/// The threads of a minidump, each with the registers of its first frame.
pub open spec fn walked_threads(
    dump: Seq<u8>,
    infos: Map<Seq<char>, Seq<u8>>,
) -> Seq<ThreadWithRegistersModel> {
    Seq::new(
        dump_threads(dump, infos).len(),
        |i: int| (dump_threads(dump, infos)[i], first_registers(dump, infos, i)),
    )
}

/// The threads of a minidump, each with the registers of its first frame.
fn threads_with_registers(
    state: &symbolic::minidump::processor::ProcessState,
    arch: Arch,
) -> (r: Vec<ThreadWithRegisters>)
    requires
        has_lists(state_dump(*state)),
        arch == dump_arch(state_dump(*state), state_frame_infos(*state)),
    ensures
        r.deep_view() == walked_threads(state_dump(*state), state_frame_infos(*state)),
{
    let ghost dump = state_dump(*state);
    let ghost infos = state_frame_infos(*state);
    let walked: Vec<WalkedThread> = process_threads(state);
    let ghost model = walked.deep_view();
    let total: usize = walked.len();
    let mut threads: Vec<ThreadWithRegisters> = Vec::new();
    let mut index: usize = 0;
    for thread in it: walked
        invariant
            dump == state_dump(*state),
            infos == state_frame_infos(*state),
            has_lists(dump),
            arch == dump_arch(dump, infos),
            model == dump_threads(dump, infos),
            model.len() == it.seq().len() == total,
            forall|i: int| 0 <= i < model.len() ==> #[trigger] model[i] == it.seq()[i].deep_view(),
            index == it.index(),
            threads.len() == index,
            forall|i: int|
                0 <= i < threads.len() ==> (#[trigger] threads@[i]).deep_view() == (
                    model[i],
                    first_registers(dump, infos, i),
                ),
    {
        assert(model[index as int] == thread.deep_view());
        let registers: Vec<(String, RegVal)> = if thread.frames.len() == 0 {
            Vec::new()
        } else {
            process_registers(state, index, 0, arch.code())
        };
        assert(registers.deep_view() =~= first_registers(dump, infos, index as int));
        threads.push((thread, registers));
        index += 1;
    }
    assert(threads.deep_view() =~= walked_threads(dump, infos));
    threads
}

/// Whether all return addresses fit once what was taken off is added again.
fn check_returns(arch: Arch, threads: &Vec<ThreadWithRegisters>) -> (r: bool)
    ensures
        r == all_returns_fit(arch, threads.deep_view()),
{
    let offset: u64 = crate::minidump::taken_off(arch.cpu_family());
    let ghost model = threads.deep_view();
    let mut t: usize = 0;
    while t < threads.len()
        invariant
            offset == return_offset(arch.family()),
            model == threads.deep_view(),
            0 <= t <= threads.len(),
            forall|i: int| 0 <= i < t ==> returns_fit(arch, (#[trigger] model[i]).0.frames),
        decreases threads.len() - t,
    {
        let frames = &threads[t].0.frames;
        let ghost found = model[t as int].0.frames;
        assert(found == frames.deep_view());
        let mut f: usize = 0;
        while f < frames.len()
            invariant
                offset == return_offset(arch.family()),
                model == threads.deep_view(),
                0 <= t < model.len(),
                found == model[t as int].0.frames,
                found == frames.deep_view(),
                0 <= f <= frames.len(),
                forall|i: int|
                    0 <= i < f ==> (#[trigger] found[i]).return_address + offset <= u64::MAX,
            decreases frames.len() - f,
        {
            assert(found[f as int].return_address == frames@[f as int].return_address);
            if frames[f].return_address.checked_add(offset).is_none() {
                assert(!returns_fit(arch, model[t as int].0.frames));
                return false;
            }
            f += 1;
        }
        t += 1;
    }
    true
}

/// Walks the stacks of a minidump with the unwind information that was fetched, and turns it into a
/// request. Fails where the stack walker can make nothing of the minidump. There is no result where
/// the stack walker cannot be given the minidump, finds no modules or no threads in it, or a return
/// address does not fit once what the stack walker took off is added again.
pub fn stackwalk_minidump(
    dump: &[u8],
    scope: Scope,
    sources: Arc<Vec<SourceConfig>>,
    outcomes: Vec<CfiOutcome>,
) -> (r: Option<Result<(SymbolicateStacktraces, MinidumpState), SymbolicationError>>)
    ensures
        ({
            let infos = frame_infos(cfi_outcomes(outcomes@));
            let statuses = unwind_statuses(cfi_outcomes(outcomes@));
            let summary = dump_summary(dump@, infos);
            let arch = dump_arch(dump@, infos);
            let threads = walked_threads(dump@, infos);
            let result = minidump_result(dump@, infos);
            match r {
                Some(Ok((request, state))) => {
                    &&& can_be_read(dump@)
                    &&& is_usable(result)
                    &&& has_lists(dump@)
                    &&& all_returns_fit(arch, threads)
                    &&& request.deep_view().scope == scope.deep_view()
                    &&& request.deep_view().sources == sources.deep_view()
                    &&& request.deep_view().signal is None
                    &&& request.deep_view().stacktraces.len() == dump_threads(dump@, infos).len()
                    &&& state.deep_view().thread_ids.len() == dump_threads(dump@, infos).len()
                    &&& request.deep_view() == request_of_minidump(
                        summary,
                        arch,
                        dump_modules(dump@, infos),
                        threads,
                        statuses,
                        scope.deep_view(),
                        sources.deep_view(),
                    )
                    &&& state.deep_view() == state_of_minidump(summary, arch, threads)
                },
                Some(Err(err)) => {
                    &&& can_be_read(dump@)
                    &&& !is_usable(result)
                    &&& is_minidump_failure(err, result)
                },
                None => can_be_read(dump@) ==> is_usable(result) && (has_lists(dump@)
                    ==> !all_returns_fit(arch, threads)),
            }
        }),
{
    if !check_readable(dump) {
        return None;
    }
    let found = collect_unwind_info(outcomes);
    let entries = found.frame_infos.entries();
    proof {
        let model = infos_model(found.frame_infos);
        assert(infos_map(entries@) =~= model);
        assert forall|i: int| 0 <= i < entries@.len() implies model.contains_key(
            (#[trigger] entries@[i]).0@,
        ) && model[entries@[i].0@] == entries@[i].1@ by {
            lemma_entry(entries@, i);
        }
    }
    let state = match process_minidump(dump, entries.as_slice()) {
        Ok(state) => state,
        Err(err) => return Some(Err(SymbolicationError::from(err))),
    };
    if !check_lists(dump) {
        return None;
    }
    let summary = process_summary(&state);
    let arch = Arch::from_name(summary.cpu_family.as_str());
    let modules = process_modules(&state);
    let threads = threads_with_registers(&state, arch);
    if !check_returns(arch, &threads) {
        return None;
    }
    Some(Ok(minidump_request(summary, arch, modules, threads, &found.statuses, scope, sources)))
}

} // verus!
