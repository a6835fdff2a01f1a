//! Symbolication of stack traces.

use vstd::prelude::*;

use crate::arch::{
    call_site, caller_address, has_call_site, ip_register, ip_register_name, Arch, FrameTrust,
    Language,
};
use crate::demangle::{read_name, readable_name, DemangleFormat};
use crate::lookup::{first_holder, image_addr, law_first_holder, ImageModel, SymCacheLookup};
use crate::string_map::StringMap;
use crate::symcache::{
    can_be_looked_up, check_lookup, has_inlined_behind_parents, inlined_behind_parents, join_path,
    joined_path, law_sound_cache_can_be_looked_up, lookup_lines, parse_symcache, symcache_arch_code,
    symcache_lines, CacheContents, ContentsModel, LineModel, LineRecord,
};
use crate::types::{
    clone_text, CompleteObjectInfo, CompleteStacktrace, CompletedModel,
    CompletedSymbolicationResponse, FrameModel, FrameStatus, HexValue, ObjectFileStatus,
    ObjectModel, RawFrame, RawFrameModel, RawStacktrace, RawStacktraceModel, Signal,
    StacktraceModel, SymbolicatedFrame,
};

verus! {

/// Function arguments are part of demangled names.
pub const DEMANGLE_WITH_ARGUMENTS: bool = true;

/// The value of the instruction pointer register, of which only the first frame knows.
pub open spec fn ip_value(arch: Arch, registers: Map<Seq<char>, u64>, index: int) -> Option<u64> {
    match ip_register(arch.family()) {
        Some(name) => if index == 0 && registers.contains_key(name) {
            Some(registers[name])
        } else {
            None
        },
        None => None,
    }
}

/// The address of the instruction that the frame at `index` executes. Below zero where the address
/// of the frame is that of no return.
pub open spec fn frame_site(
    arch: Arch,
    addr: u64,
    index: int,
    signal: Option<u32>,
    registers: Map<Seq<char>, u64>,
) -> int {
    call_site(arch.family(), addr, index == 0, signal, ip_value(arch, registers, index))
}

/// The address of the instruction that the frame at `index` executes.
pub fn frame_address(
    arch: Arch,
    addr: u64,
    index: usize,
    signal: Option<Signal>,
    registers: &StringMap<HexValue>,
) -> (r: u64)
    requires
        frame_site(arch, addr, index as int, signal.deep_view(), registers.deep_view()) >= 0,
    ensures
        r == frame_site(arch, addr, index as int, signal.deep_view(), registers.deep_view()),
        index > 0 ==> r < addr,
        r <= addr,
{
    proof {
        arch.law_code_round_trip();
    }
    let crashing_frame: bool = index == 0;
    let ip_reg: Option<u64> = ip_reg_value(arch, index, registers);
    let signal: Option<u32> = signal_number(signal);
    caller_address(arch.code(), addr, crashing_frame, signal, ip_reg)
}

fn ip_reg_value(arch: Arch, index: usize, registers: &StringMap<HexValue>) -> (r: Option<u64>)
    ensures
        r == ip_value(arch, registers.deep_view(), index as int),
{
    proof {
        arch.law_code_round_trip();
    }
    if index != 0 {
        return None;
    }
    match ip_register_name(arch.code()) {
        Some(name) => match registers.get(name) {
            Some(value) => Some(value.0),
            None => None,
        },
        None => None,
    }
}

fn signal_number(signal: Option<Signal>) -> (r: Option<u32>)
    ensures
        r == signal.deep_view(),
{
    match signal {
        Some(signal) => Some(signal.0),
        None => None,
    }
}

/// A text that is not empty.
pub open spec fn non_empty(text: Seq<char>) -> Option<Seq<char>> {
    if text.len() == 0 {
        None
    } else {
        Some(text)
    }
}

fn non_empty_text(text: String) -> (r: Option<String>)
    ensures
        r.deep_view() == non_empty(text@),
{
    if text.as_str().is_empty() {
        None
    } else {
        Some(text)
    }
}

/// The frame that a source line stands for, given the path of the source file joined to the
/// compilation directory and the demangled name of the function, or its symbol where that cannot be
/// demangled.
///
/// Where joining changed nothing, the path is absolute and not usable as a file name: the name of
/// the file is used. Otherwise the path is relative, most likely to the compilation directory, and
/// useful as a file name.
pub open spec fn frame_of_line(
    info: ObjectModel,
    index: usize,
    trust: FrameTrust,
    line: LineModel,
    abs_path: Seq<char>,
    function: Seq<char>,
) -> FrameModel {
    FrameModel {
        status: FrameStatus::Symbolicated,
        original_index: Some(index),
        raw: RawFrameModel {
            instruction_addr: (info.raw.image_addr + line.instruction_address) as u64,
            package: info.raw.code_file,
            trust,
        },
        lang: if Language::spec_from_code(line.language) == Language::Unknown {
            None
        } else {
            Some(Language::spec_from_code(line.language))
        },
        symbol: Some(line.symbol),
        sym_addr: Some((info.raw.image_addr + line.function_address) as u64),
        function: Some(function),
        filename: non_empty(
            if abs_path == line.path {
                line.filename
            } else {
                line.path
            },
        ),
        abs_path: non_empty(abs_path),
        lineno: Some(line.line),
    }
}

/// Whether the addresses of a line fit once the address of the image is added.
pub open spec fn line_fits(info: ObjectModel, line: LineModel) -> bool {
    &&& info.raw.image_addr + line.function_address <= u64::MAX
    &&& info.raw.image_addr + line.instruction_address <= u64::MAX
}

/// The frame that a source line stands for, given the path of the source file joined to the
/// compilation directory and the demangled name of the function, or its symbol where that cannot be
/// demangled.
pub fn line_frame(
    info: &CompleteObjectInfo,
    index: usize,
    trust: FrameTrust,
    line: LineRecord,
    abs_path: String,
    function: String,
) -> (r: SymbolicatedFrame)
    requires
        line_fits(info.deep_view(), line.deep_view()),
    ensures
        r.deep_view() == frame_of_line(
            info.deep_view(),
            index,
            trust,
            line.deep_view(),
            abs_path@,
            function@,
        ),
{
    let filename: String = if abs_path == line.path {
        line.filename
    } else {
        line.path
    };
    let lang = Language::from_code(line.language);
    SymbolicatedFrame {
        status: FrameStatus::Symbolicated,
        original_index: Some(index),
        raw: RawFrame {
            instruction_addr: HexValue(info.raw.image_addr.0 + line.instruction_address),
            package: clone_text(&info.raw.code_file),
            trust,
        },
        lang: if lang == Language::Unknown {
            None
        } else {
            Some(lang)
        },
        symbol: Some(line.symbol),
        sym_addr: Some(HexValue(info.raw.image_addr.0 + line.function_address)),
        function: Some(function),
        filename: non_empty_text(filename),
        abs_path: non_empty_text(abs_path),
        lineno: Some(line.line),
    }
}

/// The frame that a source line of a symbol cache stands for.
pub open spec fn symbolicated_line(
    info: ObjectModel,
    index: usize,
    trust: FrameTrust,
    line: LineModel,
) -> FrameModel {
    frame_of_line(
        info,
        index,
        trust,
        line,
        joined_path(line.compilation_dir, line.path),
        readable_name(
            line.symbol,
            line.language,
            DEMANGLE_WITH_ARGUMENTS,
            DemangleFormat::Short,
        ),
    )
}

/// The frames that the lines found in a symbol cache stand for. Not to have found any is to miss
/// the symbol, and not to have been able to look is to have a malformed cache.
pub open spec fn frames_of_lines(
    info: ObjectModel,
    index: usize,
    trust: FrameTrust,
    lines: Option<Seq<LineModel>>,
) -> Result<Seq<FrameModel>, FrameStatus> {
    match lines {
        Some(lines) => if lines.len() == 0 {
            Err(FrameStatus::MissingSymbol)
        } else {
            Ok(lines.map_values(|line: LineModel| symbolicated_line(info, index, trust, line)))
        },
        None => Err(FrameStatus::Malformed),
    }
}

/// The model of what became of a frame.
pub open spec fn frames_model(
    frames: Result<Vec<SymbolicatedFrame>, FrameStatus>,
) -> Result<Seq<FrameModel>, FrameStatus> {
    match frames {
        Ok(frames) => Ok(frames.deep_view()),
        Err(status) => Err(status),
    }
}

/// The frames that the lines found in a symbol cache stand for, where the cache could be searched.
pub fn line_frames(
    info: &CompleteObjectInfo,
    index: usize,
    trust: FrameTrust,
    lines: Option<Vec<LineRecord>>,
) -> (r: Result<Vec<SymbolicatedFrame>, FrameStatus>)
    requires
        lines matches Some(lines) ==> lines_fit(info.deep_view(), lines.deep_view()),
    ensures
        frames_model(r) == frames_of_lines(info.deep_view(), index, trust, lines.deep_view()),
        r matches Ok(frames) ==> (lines matches Some(lines) && frames.len() == lines.len()
            && forall|k: int|
            #![trigger frames@[k]]
            0 <= k < frames.len() ==> frames@[k].lineno == Some(lines@[k].line)
                && frames@[k].symbol.deep_view() == Some(lines@[k].symbol@)),
{
    let lines = match lines {
        Some(lines) => lines,
        None => return Err(FrameStatus::Malformed),
    };
    let ghost model = lines.deep_view();
    let mut frames: Vec<SymbolicatedFrame> = Vec::new();
    for line in it: lines
        invariant
            model.len() == it.seq().len(),
            forall|i: int| 0 <= i < model.len() ==> #[trigger] model[i] == it.seq()[i].deep_view(),
            lines_fit(info.deep_view(), model),
            frames.len() == it.index(),
            forall|i: int|
                0 <= i < frames.len() ==> (#[trigger] frames@[i]).deep_view() == symbolicated_line(
                    info.deep_view(),
                    index,
                    trust,
                    model[i],
                ),
    {
        assert(model[it.index()] == line.deep_view());
        let abs_path: String = join_path(line.compilation_dir.as_str(), line.path.as_str());
        let function: String = read_name(
            line.symbol.as_str(),
            line.language,
            DEMANGLE_WITH_ARGUMENTS,
            DemangleFormat::Short,
        );
        frames.push(line_frame(info, index, trust, line, abs_path, function));
    }
    if frames.len() == 0 {
        Err(FrameStatus::MissingSymbol)
    } else {
        assert(frames.deep_view() =~= model.map_values(
            |line: LineModel| symbolicated_line(info.deep_view(), index, trust, line),
        ));
        Ok(frames)
    }
}

/// What becomes of a frame whose image has a symbol cache.
pub open spec fn frames_in_cache(
    info: ObjectModel,
    data: Seq<u8>,
    arch: Arch,
    signal: Option<u32>,
    registers: Map<Seq<char>, u64>,
    index: usize,
    frame: RawFrameModel,
) -> Result<Seq<FrameModel>, FrameStatus> {
    let site = frame_site(arch, frame.instruction_addr, index as int, signal, registers);
    if site < info.raw.image_addr {
        Err(FrameStatus::MissingSymbol)
    } else {
        frames_of_lines(
            info,
            index,
            frame.trust,
            symcache_lines(data, (site - info.raw.image_addr) as u64),
        )
    }
}

/// What becomes of the frame at `index`: the frames that stand for it once inlined functions are
/// told apart, the innermost first, or why there are none.
pub open spec fn symbolicated_frame(
    images: Seq<ImageModel>,
    signal: Option<u32>,
    registers: Map<Seq<char>, u64>,
    index: usize,
    frame: RawFrameModel,
) -> Result<Seq<FrameModel>, FrameStatus> {
    let holder = first_holder(images, frame.instruction_addr);
    if holder == images.len() {
        Err(FrameStatus::UnknownImage)
    } else {
        let info = images[holder].0;
        match images[holder].1 {
            Some(file) => match file.contents {
                ContentsModel::Negative => Err(FrameStatus::Missing),
                ContentsModel::Malformed => Err(FrameStatus::Malformed),
                ContentsModel::Positive(data) => match symcache_arch_code(data) {
                    Some(code) => frames_in_cache(
                        info,
                        data,
                        Arch::spec_from_code(code),
                        signal,
                        registers,
                        index,
                        frame,
                    ),
                    None => Err(FrameStatus::Malformed),
                },
            },
            None => if info.debug_status == ObjectFileStatus::Malformed {
                Err(FrameStatus::Malformed)
            } else {
                Err(FrameStatus::Missing)
            },
        }
    }
}

/// Whether the addresses of all lines fit once the address of the image is added.
pub open spec fn lines_fit(info: ObjectModel, lines: Seq<LineModel>) -> bool {
    forall|i: int| 0 <= i < lines.len() ==> line_fits(info, #[trigger] lines[i])
}

/// Whether a frame whose image has a symbol cache can be looked up: the address of the frame is
/// that of a return, the search for the functions that cover it ends, and the addresses of the lines
/// that were found fit once the address of the image is added.
pub open spec fn fits_in_cache(
    info: ObjectModel,
    data: Seq<u8>,
    arch: Arch,
    signal: Option<u32>,
    registers: Map<Seq<char>, u64>,
    index: usize,
    frame: RawFrameModel,
) -> bool {
    let site = frame_site(arch, frame.instruction_addr, index as int, signal, registers);
    let addr = (site - info.raw.image_addr) as u64;
    &&& site >= 0
    &&& site >= info.raw.image_addr ==> {
        &&& can_be_looked_up(data, addr)
        &&& symcache_lines(data, addr) matches Some(lines) ==> lines_fit(info, lines)
    }
}

/// Whether the frame at `index` can be looked up.
pub open spec fn frame_fits(
    images: Seq<ImageModel>,
    signal: Option<u32>,
    registers: Map<Seq<char>, u64>,
    index: usize,
    frame: RawFrameModel,
) -> bool {
    let holder = first_holder(images, frame.instruction_addr);
    holder < images.len() ==> (images[holder].1 matches Some(file) ==> (
    file.contents matches ContentsModel::Positive(data) ==> (symcache_arch_code(data) matches Some(
        code,
    ) ==> fits_in_cache(
        images[holder].0,
        data,
        Arch::spec_from_code(code),
        signal,
        registers,
        index,
        frame,
    ))))
}

/// The frame with the file of its image.
pub open spec fn with_package(images: Seq<ImageModel>, frame: RawFrameModel) -> RawFrameModel {
    let holder = first_holder(images, frame.instruction_addr);
    if holder == images.len() {
        frame
    } else {
        RawFrameModel { package: images[holder].0.raw.code_file, ..frame }
    }
}

fn symbolize_in_cache(
    info: &CompleteObjectInfo,
    data: &Vec<u8>,
    arch: Arch,
    signal: Option<Signal>,
    registers: &StringMap<HexValue>,
    index: usize,
    frame: &RawFrame,
) -> (r: Result<Vec<SymbolicatedFrame>, FrameStatus>)
    requires
        fits_in_cache(
            info.deep_view(),
            data@,
            arch,
            signal.deep_view(),
            registers.deep_view(),
            index,
            frame.deep_view(),
        ),
    ensures
        frames_model(r) == frames_in_cache(
            info.deep_view(),
            data@,
            arch,
            signal.deep_view(),
            registers.deep_view(),
            index,
            frame.deep_view(),
        ),
{
    let site: u64 = frame_address(arch, frame.instruction_addr.0, index, signal, registers);
    match site.checked_sub(info.raw.image_addr.0) {
        Some(relative_addr) => {
            let lines = lookup_lines(data.as_slice(), relative_addr);
            line_frames(info, index, frame.trust, lines)
        },
        None => Err(FrameStatus::MissingSymbol),
    }
}

/// Symbolicates the frame at `index`, and notes the file of its image in it.
fn symbolize_frame(
    caches: &SymCacheLookup,
    signal: Option<Signal>,
    registers: &StringMap<HexValue>,
    index: usize,
    frame: &mut RawFrame,
) -> (r: Result<Vec<SymbolicatedFrame>, FrameStatus>)
    requires
        frame_fits(
            caches@,
            signal.deep_view(),
            registers.deep_view(),
            index,
            old(frame).deep_view(),
        ),
    ensures
        frames_model(r) == symbolicated_frame(
            caches@,
            signal.deep_view(),
            registers.deep_view(),
            index,
            old(frame).deep_view(),
        ),
        final(frame).deep_view() == with_package(caches@, old(frame).deep_view()),
{
    proof {
        law_first_holder(caches@, frame.instruction_addr.0);
    }
    let (info, file) = match caches.lookup_symcache(frame.instruction_addr.0) {
        Some((_, info, Some(file))) => {
            frame.package = clone_text(&info.raw.code_file);
            (info, file)
        },
        Some((_, info, None)) => {
            frame.package = clone_text(&info.raw.code_file);
            if info.debug_status == ObjectFileStatus::Malformed {
                return Err(FrameStatus::Malformed);
            } else {
                return Err(FrameStatus::Missing);
            }
        },
        None => return Err(FrameStatus::UnknownImage),
    };
    match &file.contents {
        CacheContents::Negative => Err(FrameStatus::Missing),
        CacheContents::Malformed => Err(FrameStatus::Malformed),
        CacheContents::Positive(data) => match parse_symcache(data.as_slice()) {
            Some(code) => symbolize_in_cache(
                info,
                data,
                Arch::from_code(code),
                signal,
                registers,
                index,
                frame,
            ),
            None => Err(FrameStatus::Malformed),
        },
    }
}

/// A frame that could not be symbolicated.
pub open spec fn failed_frame(
    index: usize,
    frame: RawFrameModel,
    status: FrameStatus,
) -> FrameModel {
    FrameModel {
        status,
        original_index: Some(index),
        raw: frame,
        lang: None,
        symbol: None,
        sym_addr: None,
        function: None,
        filename: None,
        abs_path: None,
        lineno: None,
    }
}

/// Whether a frame is taken for a false positive of stack scanning: a scanned frame without a
/// symbol, or in no known image.
pub open spec fn is_false_positive(trust: FrameTrust, status: FrameStatus) -> bool {
    &&& trust == FrameTrust::Scan
    &&& (status == FrameStatus::MissingSymbol || status == FrameStatus::UnknownImage)
}

/// The frames that a stack trace has in place of the frame at `index`, given what became of it.
pub open spec fn kept_frames(
    index: usize,
    frame: RawFrameModel,
    outcome: Result<Seq<FrameModel>, FrameStatus>,
) -> Seq<FrameModel> {
    match outcome {
        Ok(frames) => frames,
        Err(status) => if is_false_positive(frame.trust, status) {
            Seq::empty()
        } else {
            seq![failed_frame(index, frame, status)]
        },
    }
}

/// The frames that a stack trace has in place of the frame at `index`, given what became of it.
///
/// Stack walking goes without function records, and cannot skip scanned frames which cannot be
/// symbolicated. This is done here: a scanned frame is skipped where the debug file has no symbol
/// for it, or where no image holds it.
pub fn keep_frames(
    index: usize,
    frame: RawFrame,
    outcome: Result<Vec<SymbolicatedFrame>, FrameStatus>,
) -> (r: Vec<SymbolicatedFrame>)
    ensures
        r.deep_view() == kept_frames(index, frame.deep_view(), frames_model(outcome)),
{
    match outcome {
        Ok(frames) => frames,
        Err(status) => {
            let mut frames: Vec<SymbolicatedFrame> = Vec::new();
            if frame.trust == FrameTrust::Scan && (status == FrameStatus::MissingSymbol || status
                == FrameStatus::UnknownImage) {
                assert(frames.deep_view() =~= Seq::empty());
                return frames;
            }
            let ghost model = frame.deep_view();
            frames.push(
                SymbolicatedFrame {
                    status,
                    original_index: Some(index),
                    raw: frame,
                    lang: None,
                    symbol: None,
                    sym_addr: None,
                    function: None,
                    filename: None,
                    abs_path: None,
                    lineno: None,
                },
            );
            assert(frames.deep_view() =~= seq![failed_frame(index, model, status)]);
            frames
        },
    }
}

/// The frames that a stack trace has in place of the frame at `index`.
pub open spec fn frames_for(
    images: Seq<ImageModel>,
    signal: Option<u32>,
    registers: Map<Seq<char>, u64>,
    index: int,
    frame: RawFrameModel,
) -> Seq<FrameModel> {
    kept_frames(
        index as usize,
        with_package(images, frame),
        symbolicated_frame(images, signal, registers, index as usize, frame),
    )
}

/// A stack trace after symbolication: each frame in place of which it was found, in order.
pub open spec fn symbolized_thread(
    thread: RawStacktraceModel,
    images: Seq<ImageModel>,
    signal: Option<u32>,
) -> StacktraceModel {
    StacktraceModel {
        thread_id: None,
        is_requesting: None,
        registers: thread.registers,
        frames: Seq::new(
            thread.frames.len(),
            |i: int| frames_for(images, signal, thread.registers, i, thread.frames[i]),
        ).flatten(),
    }
}

/// Whether all frames of a stack trace can be looked up.
pub open spec fn thread_fits(
    thread: RawStacktraceModel,
    images: Seq<ImageModel>,
    signal: Option<u32>,
) -> bool {
    forall|i: int|
        0 <= i < thread.frames.len() ==> frame_fits(
            images,
            signal,
            thread.registers,
            i as usize,
            #[trigger] thread.frames[i],
        )
}

/// Symbolicates the frames of a stack trace.
pub fn symbolize_thread(
    thread: RawStacktrace,
    caches: &SymCacheLookup,
    signal: Option<Signal>,
) -> (r: CompleteStacktrace)
    requires
        thread_fits(thread.deep_view(), caches@, signal.deep_view()),
    ensures
        r.deep_view() == symbolized_thread(thread.deep_view(), caches@, signal.deep_view()),
{
    let registers = thread.registers;
    let ghost model = thread.deep_view();
    let ghost parts = Seq::new(
        model.frames.len(),
        |i: int| frames_for(caches@, signal.deep_view(), model.registers, i, model.frames[i]),
    );
    let mut frames: Vec<SymbolicatedFrame> = Vec::new();
    let total: usize = thread.frames.len();
    let mut index: usize = 0;
    proof {
        assert(parts.take(0) =~= Seq::empty());
        assert(frames.deep_view() =~= parts.take(0).flatten());
    }
    for frame in it: thread.frames
        invariant
            index == it.index(),
            it.seq().len() == model.frames.len() == total,
            forall|i: int|
                0 <= i < model.frames.len() ==> #[trigger] model.frames[i] == it.seq()[i].deep_view(),
            parts.len() == model.frames.len(),
            forall|i: int|
                0 <= i < parts.len() ==> #[trigger] parts[i] == frames_for(
                    caches@,
                    signal.deep_view(),
                    model.registers,
                    i,
                    model.frames[i],
                ),
            registers.deep_view() == model.registers,
            thread_fits(model, caches@, signal.deep_view()),
            frames.deep_view() == parts.take(index as int).flatten(),
    {
        let mut frame = frame;
        let ghost raw = frame.deep_view();
        assert(raw == model.frames[index as int]);
        let outcome = symbolize_frame(caches, signal, &registers, index, &mut frame);
        let ghost done = frames.deep_view();
        let mut kept = keep_frames(index, frame, outcome);
        proof {
            assert(kept.deep_view() == parts[index as int]);
            assert(parts.take(index + 1) =~= parts.take(index as int).push(parts[index as int]));
            parts.take(index as int).lemma_flatten_push(parts[index as int]);
        }
        let ghost added = kept.deep_view();
        frames.append(&mut kept);
        assert(frames.deep_view() =~= done + added);
        index += 1;
    }
    assert(parts.take(parts.len() as int) =~= parts);
    CompleteStacktrace { thread_id: None, is_requesting: None, registers, frames }
}

/// For each image, whether every address can be looked up in its symbol cache.
fn walkable_caches(caches: &SymCacheLookup) -> (r: Vec<bool>)
    ensures
        r.len() == caches@.len(),
        forall|i: int|
            0 <= i < caches@.len() ==> ((#[trigger] caches@[i]).1 matches Some(file) ==> (
            file.contents matches ContentsModel::Positive(data) ==> r@[i]
                == inlined_behind_parents(data))),
{
    let mut walkable: Vec<bool> = Vec::new();
    let mut i: usize = 0;
    while i < caches.len()
        invariant
            0 <= i <= caches@.len(),
            walkable.len() == i,
            forall|j: int|
                0 <= j < i ==> ((#[trigger] caches@[j]).1 matches Some(file) ==> (
                file.contents matches ContentsModel::Positive(data) ==> walkable@[j]
                    == inlined_behind_parents(data))),
        decreases caches@.len() - i,
    {
        let (_, file) = caches.get(i);
        let ok: bool = match file {
            Some(file) => match &file.contents {
                CacheContents::Positive(data) => has_inlined_behind_parents(data.as_slice()),
                _ => true,
            },
            None => true,
        };
        walkable.push(ok);
        i += 1;
    }
    walkable
}

/// Whether the addresses of all lines fit once the address of the image is added.
fn check_lines(info: &CompleteObjectInfo, lines: &Vec<LineRecord>) -> (r: bool)
    ensures
        r == lines_fit(info.deep_view(), lines.deep_view()),
{
    let ghost model = lines.deep_view();
    let base: u64 = info.raw.image_addr.0;
    let mut i: usize = 0;
    while i < lines.len()
        invariant
            model == lines.deep_view(),
            base == info.deep_view().raw.image_addr,
            0 <= i <= lines.len(),
            forall|j: int| 0 <= j < i ==> line_fits(info.deep_view(), #[trigger] model[j]),
        decreases lines.len() - i,
    {
        let line = &lines[i];
        assert(model[i as int] == line.deep_view());
        let ok: bool = base.checked_add(line.function_address).is_some() && base.checked_add(
            line.instruction_address,
        ).is_some();
        assert(ok == line_fits(info.deep_view(), model[i as int]));
        if !ok {
            return false;
        }
        i += 1;
    }
    true
}

/// Whether the frame at `index` can be looked up.
fn check_frame(
    caches: &SymCacheLookup,
    walkable: &Vec<bool>,
    signal: Option<Signal>,
    registers: &StringMap<HexValue>,
    index: usize,
    frame: &RawFrame,
) -> (r: bool)
    requires
        walkable.len() == caches@.len(),
        forall|i: int|
            0 <= i < caches@.len() ==> ((#[trigger] caches@[i]).1 matches Some(file) ==> (
            file.contents matches ContentsModel::Positive(data) ==> walkable@[i]
                == inlined_behind_parents(data))),
    ensures
        r == frame_fits(
            caches@,
            signal.deep_view(),
            registers.deep_view(),
            index,
            frame.deep_view(),
        ),
{
    let (at, info, data) = match caches.lookup_symcache(frame.instruction_addr.0) {
        Some((at, info, Some(file))) => match &file.contents {
            CacheContents::Positive(data) => (at, info, data),
            _ => return true,
        },
        _ => return true,
    };
    let arch = match parse_symcache(data.as_slice()) {
        Some(code) => Arch::from_code(code),
        None => return true,
    };
    let addr: u64 = frame.instruction_addr.0;
    let ip_reg: Option<u64> = ip_reg_value(arch, index, registers);
    if !has_call_site(arch.cpu_family(), addr, index == 0, signal_number(signal), ip_reg) {
        return false;
    }
    let site: u64 = frame_address(arch, addr, index, signal, registers);
    let relative_addr: u64 = match site.checked_sub(info.raw.image_addr.0) {
        Some(relative_addr) => relative_addr,
        None => return true,
    };
    assert(caches@[at as int].1 matches Some(file) && file.contents == ContentsModel::Positive(
        data@,
    ));
    proof {
        if walkable@[at as int] {
            law_sound_cache_can_be_looked_up(data@, relative_addr);
        }
    }
    if !walkable[at] && !check_lookup(data.as_slice(), relative_addr) {
        return false;
    }
    match lookup_lines(data.as_slice(), relative_addr) {
        Some(lines) => check_lines(info, &lines),
        None => true,
    }
}

/// Whether all frames of a stack trace can be looked up.
fn check_thread(
    thread: &RawStacktrace,
    caches: &SymCacheLookup,
    walkable: &Vec<bool>,
    signal: Option<Signal>,
) -> (r: bool)
    requires
        walkable.len() == caches@.len(),
        forall|i: int|
            0 <= i < caches@.len() ==> ((#[trigger] caches@[i]).1 matches Some(file) ==> (
            file.contents matches ContentsModel::Positive(data) ==> walkable@[i]
                == inlined_behind_parents(data))),
    ensures
        r == thread_fits(thread.deep_view(), caches@, signal.deep_view()),
{
    let ghost model = thread.deep_view();
    let mut i: usize = 0;
    while i < thread.frames.len()
        invariant
            walkable.len() == caches@.len(),
            forall|i: int|
                0 <= i < caches@.len() ==> ((#[trigger] caches@[i]).1 matches Some(file) ==> (
                file.contents matches ContentsModel::Positive(data) ==> walkable@[i]
                    == inlined_behind_parents(data))),
            model == thread.deep_view(),
            0 <= i <= thread.frames.len(),
            forall|j: int|
                0 <= j < i ==> frame_fits(
                    caches@,
                    signal.deep_view(),
                    model.registers,
                    j as usize,
                    #[trigger] model.frames[j],
                ),
        decreases thread.frames.len() - i,
    {
        assert(model.frames[i as int] == thread.frames@[i as int].deep_view());
        if !check_frame(caches, walkable, signal, &thread.registers, i, &thread.frames[i]) {
            return false;
        }
        i += 1;
    }
    true
}

/// Symbolicates the frames of a stack trace, where all of them can be looked up.
pub fn checked_symbolize_thread(
    thread: RawStacktrace,
    caches: &SymCacheLookup,
    signal: Option<Signal>,
) -> (r: Option<CompleteStacktrace>)
    ensures
        r.deep_view() == (if thread_fits(thread.deep_view(), caches@, signal.deep_view()) {
            Some(symbolized_thread(thread.deep_view(), caches@, signal.deep_view()))
        } else {
            None
        }),
{
    let walkable = walkable_caches(caches);
    if check_thread(&thread, caches, &walkable, signal) {
        Some(symbolize_thread(thread, caches, signal))
    } else {
        None
    }
}

/// The response to a request whose images and symbol caches were found.
pub open spec fn symbolicated(
    images: Seq<ImageModel>,
    stacktraces: Seq<RawStacktraceModel>,
    signal: Option<u32>,
) -> CompletedModel {
    CompletedModel {
        timestamp: None,
        signal,
        system_info: None,
        crashed: None,
        crash_reason: None,
        assertion: None,
        stacktraces: stacktraces.map_values(
            |thread: RawStacktraceModel| symbolized_thread(thread, images, signal),
        ),
        modules: images.map_values(|image: ImageModel| image.0),
    }
}

/// Whether all frames of all stack traces can be looked up.
pub open spec fn threads_fit(
    stacktraces: Seq<RawStacktraceModel>,
    images: Seq<ImageModel>,
    signal: Option<u32>,
) -> bool {
    forall|i: int|
        0 <= i < stacktraces.len() ==> thread_fits(#[trigger] stacktraces[i], images, signal)
}

/// Symbolicates stack traces.
pub fn symbolicate(
    object_lookup: SymCacheLookup,
    stacktraces: Vec<RawStacktrace>,
    signal: Option<Signal>,
) -> (r: CompletedSymbolicationResponse)
    requires
        threads_fit(stacktraces.deep_view(), object_lookup@, signal.deep_view()),
    ensures
        r.deep_view() == symbolicated(
            object_lookup@,
            stacktraces.deep_view(),
            signal.deep_view(),
        ),
        r.signal == signal,
        r.stacktraces.len() == stacktraces.len(),
        r.deep_view().modules.len() == object_lookup@.len(),
{
    let ghost model = stacktraces.deep_view();
    let mut complete: Vec<CompleteStacktrace> = Vec::new();
    for thread in it: stacktraces
        invariant
            model.len() == it.seq().len(),
            forall|i: int| 0 <= i < model.len() ==> #[trigger] model[i] == it.seq()[i].deep_view(),
            threads_fit(model, object_lookup@, signal.deep_view()),
            complete.len() == it.index(),
            forall|i: int|
                0 <= i < complete.len() ==> (#[trigger] complete@[i]).deep_view()
                    == symbolized_thread(model[i], object_lookup@, signal.deep_view()),
    {
        assert(thread.deep_view() == model[complete.len() as int]);
        complete.push(symbolize_thread(thread, &object_lookup, signal));
    }
    assert(complete.deep_view() =~= model.map_values(
        |thread: RawStacktraceModel|
            symbolized_thread(thread, object_lookup@, signal.deep_view()),
    ));
    CompletedSymbolicationResponse {
        timestamp: None,
        signal,
        system_info: None,
        crashed: None,
        crash_reason: None,
        assertion: None,
        stacktraces: complete,
        modules: object_lookup.into_modules(),
    }
}

/// Symbolicates stack traces, where all of their frames can be looked up.
pub fn checked_symbolicate(
    object_lookup: SymCacheLookup,
    stacktraces: Vec<RawStacktrace>,
    signal: Option<Signal>,
) -> (r: Option<CompletedSymbolicationResponse>)
    ensures
        r.deep_view() == (if threads_fit(
            stacktraces.deep_view(),
            object_lookup@,
            signal.deep_view(),
        ) {
            Some(symbolicated(object_lookup@, stacktraces.deep_view(), signal.deep_view()))
        } else {
            None
        }),
{
    let walkable = walkable_caches(&object_lookup);
    let ghost model = stacktraces.deep_view();
    let mut i: usize = 0;
    while i < stacktraces.len()
        invariant
            walkable.len() == object_lookup@.len(),
            forall|i: int|
                0 <= i < object_lookup@.len() ==> ((#[trigger] object_lookup@[i]).1 matches Some(
                    file,
                ) ==> (file.contents matches ContentsModel::Positive(data) ==> walkable@[i]
                    == inlined_behind_parents(data))),
            model == stacktraces.deep_view(),
            0 <= i <= stacktraces.len(),
            forall|j: int|
                0 <= j < i ==> thread_fits(
                    #[trigger] model[j],
                    object_lookup@,
                    signal.deep_view(),
                ),
        decreases stacktraces.len() - i,
    {
        assert(model[i as int] == stacktraces@[i as int].deep_view());
        if !check_thread(&stacktraces[i], &object_lookup, &walkable, signal) {
            return None;
        }
        i += 1;
    }
    Some(symbolicate(object_lookup, stacktraces, signal))
}

} // verus!
